//! Stateless signed tokens: `<ident>.<expiry>.<signature>`, the first two
//! segments base64url of UTF-8 text, the signature an HMAC-SHA512 over the
//! first two segments and the subject's salt, keyed with the process secret.

use vstd::prelude::*;
use vstd::string::*;
use vstd::utf8::*;

use crate::b64::{b64u_decode_to_string, b64u_encode, b64u_of, lemma_b64u_injective, lemma_b64u_shape};
use crate::mac::{constant_time_eq, hmac_sha512, hmac_sha512_of};
use crate::text::concat_bytes;
use crate::time::{
    clock_out_of_range, in_rfc3339_range, instant_before, plus_secs, plus_secs_in_range, plus_secs_text, reads_back_as_plus, rfc3339_instant_of, TimeOutOrRange,
    TimeRfc3339,
};

verus! {

pub type Result<T> = core::result::Result<T, Error>;

#[derive(Debug, PartialEq, Eq)]
pub enum Error {
    HmacFailNewFromSlice,
    InvalidFormat,
    CannotDecodeIdent,
    CannotDecodeExp,
    SignatureNotMatching,
    ExpNotIso,
    Expired,
    TimeOutOfRange(TimeOutOrRange),
}

/// A token: the subject, the expiry as RFC 3339 text, and the signature as
/// base64url text.
#[derive(Debug)]
pub struct Token {
    pub ident: String,
    pub exp: String,
    pub sign_b64u: String,
}

/// Base64url of the UTF-8 bytes of a text.
pub open spec fn b64u_text(s: Seq<char>) -> Seq<char> {
    b64u_of(encode_utf8(s))
}

/// The part of a token that the signature covers.
pub open spec fn signed_content(ident: Seq<char>, exp: Seq<char>) -> Seq<char> {
    b64u_text(ident) + seq!['.'] + b64u_text(exp)
}

/// The signature of a subject and an expiry under a salt and a key.
pub open spec fn signature_of(ident: Seq<char>, exp: Seq<char>, salt: Seq<u8>, key: Seq<u8>) -> Seq<char> {
    b64u_of(hmac_sha512_of(key, encode_utf8(signed_content(ident, exp)) + salt))
}

/// The text of a token.
pub open spec fn token_text(ident: Seq<char>, exp: Seq<char>, sign: Seq<char>) -> Seq<char> {
    signed_content(ident, exp) + seq!['.'] + sign
}

/// `s` has dots at `i` and `j` and nowhere else, and three non-empty segments.
pub open spec fn dots_at(s: Seq<char>, i: int, j: int) -> bool {
    &&& 0 < i
    &&& i + 1 < j
    &&& j + 1 < s.len()
    &&& s[i] == '.'
    &&& s[j] == '.'
    &&& forall|k: int| 0 <= k < s.len() && k != i && k != j ==> #[trigger] s[k] != '.'
}

/// The three segments of a token text, where it has exactly three, all non-empty.
pub open spec fn token_segments(s: Seq<char>) -> Option<(Seq<char>, Seq<char>, Seq<char>)> {
    if exists|i: int, j: int| dots_at(s, i, j) {
        let (i, j) = choose|i: int, j: int| dots_at(s, i, j);
        Some((s.subrange(0, i), s.subrange(i + 1, j), s.subrange(j + 1, s.len() as int)))
    } else {
        None
    }
}

/// The text whose UTF-8 bytes a base64url segment encodes, if any.
pub open spec fn b64u_decoded_text(seg: Seq<char>) -> Option<Seq<char>> {
    if exists|b: Seq<u8>| b64u_of(b) == seg && valid_utf8(b) {
        Some(decode_utf8(choose|b: Seq<u8>| b64u_of(b) == seg && valid_utf8(b)))
    } else {
        None
    }
}

/// Subject, expiry and signature read from a token text, or the first error.
pub open spec fn parsed_token(s: Seq<char>) -> Result<(Seq<char>, Seq<char>, Seq<char>)> {
    match token_segments(s) {
        None => Err(Error::InvalidFormat),
        Some((a, b, c)) => match b64u_decoded_text(a) {
            None => Err(Error::CannotDecodeIdent),
            Some(ident) => match b64u_decoded_text(b) {
                None => Err(Error::CannotDecodeExp),
                Some(exp) => Ok((ident, exp, c)),
            },
        },
    }
}

/// The check of a parsed token at instant `now`: the expiry must be RFC 3339,
/// the signature must be the one that salt and key give, and the expiry must
/// not come strictly before `now` (a token is still good at its expiry).
pub open spec fn token_check(
    ident: Seq<char>,
    exp: Seq<char>,
    sign: Seq<char>,
    salt: Seq<u8>,
    key: Seq<u8>,
    now: TimeRfc3339,
) -> Result<()> {
    match rfc3339_instant_of(exp) {
        None => Err(Error::ExpNotIso),
        Some((secs, nanos)) => if sign != signature_of(ident, exp, salt, key) {
            Err(Error::SignatureNotMatching)
        } else if instant_before(TimeRfc3339 { secs, nanos }, now) {
            Err(Error::Expired)
        } else {
            Ok(())
        },
    }
}

/// The subject that a token text proves at `now`, or the first error.
pub open spec fn verified_subject(s: Seq<char>, salt: Seq<u8>, key: Seq<u8>, now: TimeRfc3339) -> Result<Seq<char>> {
    match parsed_token(s) {
        Err(e) => Err(e),
        Ok((ident, exp, sign)) => match token_check(ident, exp, sign, salt, key, now) {
            Err(e) => Err(e),
            Ok(_) => Ok(ident),
        },
    }
}

/// The positions of the two dots of a token text, where it has exactly two
/// and three non-empty segments.
fn find_dots(s: &str) -> (r: Option<(usize, usize)>)
    ensures
        match r {
            Some((i, j)) => dots_at(s@, i as int, j as int),
            None => !exists|i: int, j: int| dots_at(s@, i, j),
        },
{
    let ghost t = s@;
    let n = s.unicode_len();
    let mut first: Option<usize> = None;
    let mut second: Option<usize> = None;
    let mut k: usize = 0;
    while k < n
        invariant
            t == s@,
            n == t.len(),
            0 <= k <= n,
            first is None ==> second is None,
            first is None ==> forall|m: int| 0 <= m < k ==> #[trigger] t[m] != '.',
            first is Some ==> first->Some_0 < k && t[first->Some_0 as int] == '.',
            first is Some && second is None ==> forall|m: int|
                0 <= m < k && m != first->Some_0 ==> #[trigger] t[m] != '.',
            second is Some ==> first is Some && first->Some_0 < second->Some_0 && second->Some_0 < k
                && t[second->Some_0 as int] == '.',
            second is Some ==> forall|m: int|
                0 <= m < k && m != first->Some_0 && m != second->Some_0 ==> #[trigger] t[m] != '.',
        decreases n - k,
    {
        if s.get_char(k) == '.' {
            match (first, second) {
                (None, _) => {
                    first = Some(k);
                },
                (Some(_), None) => {
                    second = Some(k);
                },
                (Some(i), Some(j)) => {
                    proof {
                        assert forall|a: int, b: int| !dots_at(t, a, b) by {
                            if dots_at(t, a, b) {
                                assert(t[i as int] == '.');
                                assert(t[j as int] == '.');
                                assert(t[k as int] == '.');
                            }
                        }
                    }
                    return None;
                },
            }
        }
        k = k + 1;
    }
    match (first, second) {
        (Some(i), Some(j)) => {
            if 0 < i && i + 1 < j && j + 1 < n {
                return Some((i, j));
            }
            proof {
                assert forall|a: int, b: int| !dots_at(t, a, b) by {
                    if dots_at(t, a, b) {
                        assert(t[a] == '.');
                        assert(t[b] == '.');
                    }
                }
            }
            None
        },
        _ => {
            proof {
                assert forall|a: int, b: int| !dots_at(t, a, b) by {
                    if dots_at(t, a, b) {
                        assert(t[a] == '.');
                        assert(t[b] == '.');
                    }
                }
            }
            None
        },
    }
}

/// Two dot layouts of one text are the same layout.
proof fn lemma_dots_unique(s: Seq<char>, i1: int, j1: int, i2: int, j2: int)
    requires
        dots_at(s, i1, j1),
        dots_at(s, i2, j2),
    ensures
        i1 == i2 && j1 == j2,
{
    assert(s[i1] == '.');
    assert(s[j1] == '.');
    assert(s[i2] == '.');
    assert(s[j2] == '.');
}

/// A segment that is base64url of a text's UTF-8 bytes decodes to that text,
/// and a non-empty text gives a non-empty segment without dots.
proof fn lemma_segment_round_trip(t: Seq<char>)
    ensures
        b64u_decoded_text(b64u_text(t)) == Some(t),
        forall|i: int| 0 <= i < b64u_text(t).len() ==> b64u_text(t)[i] != '.',
        t.len() > 0 ==> b64u_text(t).len() > 0,
{
    let b = encode_utf8(t);
    encode_utf8_valid_utf8(t);
    encode_utf8_decode_utf8(t);
    lemma_b64u_shape(b);
    if t.len() > 0 && b.len() == 0 {
        assert(decode_utf8(b) =~= Seq::<char>::empty());
    }
    assert(b64u_of(b) == b64u_text(t) && valid_utf8(b));
    let c = choose|c: Seq<u8>| b64u_of(c) == b64u_text(t) && valid_utf8(c);
    lemma_b64u_injective(c, b);
}

/// Reading the text of a token gives back its subject, its expiry and its
/// signature, where the three are non-empty and the signature has no dot.
pub proof fn lemma_token_text_round_trip(ident: Seq<char>, exp: Seq<char>, sign: Seq<char>)
    requires
        ident.len() > 0,
        exp.len() > 0,
        sign.len() > 0,
        forall|i: int| 0 <= i < sign.len() ==> sign[i] != '.',
    ensures
        parsed_token(token_text(ident, exp, sign)) == Ok::<(Seq<char>, Seq<char>, Seq<char>), Error>(
            (ident, exp, sign),
        ),
{
    lemma_segment_round_trip(ident);
    lemma_segment_round_trip(exp);
    let a = b64u_text(ident);
    let b = b64u_text(exp);
    let s = token_text(ident, exp, sign);
    let i = a.len() as int;
    let j: int = a.len() as int + 1 + b.len() as int;
    assert forall|k: int| 0 <= k < s.len() && k != i && k != j implies #[trigger] s[k] != '.' by {
        if k < i {
            assert(s[k] == a[k]);
        } else if k < j {
            assert(s[k] == b[k - i - 1]);
        } else {
            assert(s[k] == sign[k - j - 1]);
        }
    }
    assert(dots_at(s, i, j));
    let (i2, j2) = choose|i2: int, j2: int| dots_at(s, i2, j2);
    lemma_dots_unique(s, i, j, i2, j2);
    assert(s.subrange(0, i) =~= a);
    assert(s.subrange(i + 1, j) =~= b);
    assert(s.subrange(j + 1, s.len() as int) =~= sign);
}

/// A token verifies, and proves its subject, with the salt and the key it
/// was signed with, at every instant up to and including its expiry.
pub proof fn lemma_issued_token_verifies(
    ident: Seq<char>,
    exp: Seq<char>,
    salt: Seq<u8>,
    key: Seq<u8>,
    now: TimeRfc3339,
)
    requires
        ident.len() > 0,
        exp.len() > 0,
        signature_of(ident, exp, salt, key).len() > 0,
        rfc3339_instant_of(exp) matches Some((secs, nanos)) && !instant_before(
            TimeRfc3339 { secs, nanos },
            now,
        ),
    ensures
        verified_subject(token_text(ident, exp, signature_of(ident, exp, salt, key)), salt, key, now)
            == Ok::<Seq<char>, Error>(ident),
{
    lemma_b64u_shape(hmac_sha512_of(key, encode_utf8(signed_content(ident, exp)) + salt));
    lemma_token_text_round_trip(ident, exp, signature_of(ident, exp, salt, key));
}

/// Round trip: a token issued at `issued` for `ttl` seconds (its expiry text
/// reading back as `issued + ttl`, as `generate_token_at` ensures within the
/// years 0000 to 9999) verifies with the same salt and key, and proves its
/// subject, at every instant up to and including `issued + ttl`; strictly
/// after that it is refused as expired.
pub proof fn lemma_issued_token_lifetime(
    ident: Seq<char>,
    exp: Seq<char>,
    issued: TimeRfc3339,
    ttl: int,
    salt: Seq<u8>,
    key: Seq<u8>,
    now: TimeRfc3339,
)
    requires
        ident.len() > 0,
        exp.len() > 0,
        signature_of(ident, exp, salt, key).len() > 0,
        plus_secs_in_range(issued, ttl),
        reads_back_as_plus(exp, issued, ttl),
    ensures
        !instant_before(plus_secs(issued, ttl)->Some_0, now) ==> verified_subject(
            token_text(ident, exp, signature_of(ident, exp, salt, key)),
            salt,
            key,
            now,
        ) == Ok::<Seq<char>, Error>(ident),
        instant_before(plus_secs(issued, ttl)->Some_0, now) ==> verified_subject(
            token_text(ident, exp, signature_of(ident, exp, salt, key)),
            salt,
            key,
            now,
        ) == Err::<Seq<char>, Error>(Error::Expired),
{
    let u = plus_secs(issued, ttl)->Some_0;
    assert(TimeRfc3339 { secs: u.secs, nanos: u.nanos } == u);
    if instant_before(u, now) {
        lemma_expired_token_refused(ident, exp, salt, key, now);
    } else {
        lemma_issued_token_verifies(ident, exp, salt, key, now);
    }
}

/// A token whose signature segment is not the one that the salt and the key
/// give for its subject and expiry is refused as not matching, whatever its
/// expiry. This covers a changed signature, and a changed subject or expiry
/// segment that still decodes but whose signature differs.
pub proof fn lemma_wrong_signature_refused(
    ident: Seq<char>,
    exp: Seq<char>,
    sign: Seq<char>,
    salt: Seq<u8>,
    key: Seq<u8>,
    now: TimeRfc3339,
)
    requires
        ident.len() > 0,
        exp.len() > 0,
        sign.len() > 0,
        forall|i: int| 0 <= i < sign.len() ==> sign[i] != '.',
        sign != signature_of(ident, exp, salt, key),
        rfc3339_instant_of(exp) is Some,
    ensures
        verified_subject(token_text(ident, exp, sign), salt, key, now) == Err::<Seq<char>, Error>(
            Error::SignatureNotMatching,
        ),
{
    lemma_token_text_round_trip(ident, exp, sign);
}

/// Once a subject's salt is replaced, a token signed with the old salt is
/// refused as not matching, for every pair of salts whose signatures differ
/// (that is, but for a collision of the MAC).
pub proof fn lemma_rotated_salt_refused(
    ident: Seq<char>,
    exp: Seq<char>,
    old_salt: Seq<u8>,
    new_salt: Seq<u8>,
    key: Seq<u8>,
    now: TimeRfc3339,
)
    requires
        ident.len() > 0,
        exp.len() > 0,
        signature_of(ident, exp, old_salt, key).len() > 0,
        signature_of(ident, exp, new_salt, key) != signature_of(ident, exp, old_salt, key),
        rfc3339_instant_of(exp) is Some,
    ensures
        verified_subject(token_text(ident, exp, signature_of(ident, exp, old_salt, key)), new_salt, key, now)
            == Err::<Seq<char>, Error>(Error::SignatureNotMatching),
{
    lemma_b64u_shape(hmac_sha512_of(key, encode_utf8(signed_content(ident, exp)) + old_salt));
    lemma_wrong_signature_refused(ident, exp, signature_of(ident, exp, old_salt, key), new_salt, key, now);
}

/// A correctly signed token is refused as expired at every instant strictly
/// after its expiry.
pub proof fn lemma_expired_token_refused(
    ident: Seq<char>,
    exp: Seq<char>,
    salt: Seq<u8>,
    key: Seq<u8>,
    now: TimeRfc3339,
)
    requires
        ident.len() > 0,
        exp.len() > 0,
        signature_of(ident, exp, salt, key).len() > 0,
        rfc3339_instant_of(exp) matches Some((secs, nanos)) && instant_before(
            TimeRfc3339 { secs, nanos },
            now,
        ),
    ensures
        verified_subject(token_text(ident, exp, signature_of(ident, exp, salt, key)), salt, key, now)
            == Err::<Seq<char>, Error>(Error::Expired),
{
    lemma_b64u_shape(hmac_sha512_of(key, encode_utf8(signed_content(ident, exp)) + salt));
    lemma_token_text_round_trip(ident, exp, signature_of(ident, exp, salt, key));
}

/// Decodes one base64url segment into text.
fn decode_segment(seg: &str) -> (r: Option<String>)
    ensures
        match b64u_decoded_text(seg@) {
            Some(t) => r matches Some(u) && u@ == t,
            None => r is None,
        },
{
    match b64u_decode_to_string(seg) {
        Ok(u) => Some(u),
        Err(_) => None,
    }
}

impl Token {
    /// Reads a token text: exactly three non-empty dot-separated segments,
    /// the first two base64url of UTF-8 text.
    pub fn parse(token_str: &str) -> (r: Result<Token>)
        ensures
            match parsed_token(token_str@) {
                Ok((ident, exp, sign)) => r matches Ok(t) && t.ident@ == ident && t.exp@ == exp
                    && t.sign_b64u@ == sign,
                Err(e) => r == Err::<Token, Error>(e),
            },
    {
        let ghost s = token_str@;
        let (i, j) = match find_dots(token_str) {
            Some(p) => p,
            None => return Err(Error::InvalidFormat),
        };
        proof {
            let (a, b) = choose|a: int, b: int| dots_at(s, a, b);
            lemma_dots_unique(s, i as int, j as int, a, b);
        }
        let n = token_str.unicode_len();
        let ident = match decode_segment(token_str.substring_char(0, i)) {
            Some(v) => v,
            None => return Err(Error::CannotDecodeIdent),
        };
        let exp = match decode_segment(token_str.substring_char(i + 1, j)) {
            Some(v) => v,
            None => return Err(Error::CannotDecodeExp),
        };
        let sign_b64u = token_str.substring_char(j + 1, n).to_owned();
        Ok(Token { ident, exp, sign_b64u })
    }

    /// The text of this token.
    pub fn to_string(&self) -> (r: String)
        ensures
            r@ == token_text(self.ident@, self.exp@, self.sign_b64u@),
    {
        let mut r = signed_content_string(self.ident.as_str(), self.exp.as_str());
        r.append(".");
        r.append(self.sign_b64u.as_str());
        proof {
            reveal_strlit(".");
            assert(r@ =~= token_text(self.ident@, self.exp@, self.sign_b64u@));
        }
        r
    }
}

fn signed_content_string(ident: &str, exp: &str) -> (r: String)
    ensures
        r@ == signed_content(ident@, exp@),
{
    let mut r = b64u_encode(ident.as_bytes());
    r.append(".");
    let e = b64u_encode(exp.as_bytes());
    r.append(e.as_str());
    proof {
        reveal_strlit(".");
        assert(r@ =~= signed_content(ident@, exp@));
    }
    r
}

/// Signs a subject and an expiry with a salt and a key.
pub fn token_sign_into_b64u(ident: &str, exp: &str, salt: &[u8; 16], key: &[u8]) -> (r: Result<String>)
    ensures
        r matches Ok(s) && s@ == signature_of(ident@, exp@, salt@, key@) && s@.len() > 0,
{
    let content = signed_content_string(ident, exp);
    let msg = concat_bytes(content.as_str().as_bytes(), salt.as_slice());
    match hmac_sha512(key, msg.as_slice()) {
        Some(tag) => {
            let r = b64u_encode(tag.as_slice());
            proof {
                lemma_b64u_shape(tag@);
            }
            Ok(r)
        },
        None => Err(Error::HmacFailNewFromSlice),
    }
}

/// Checks a token at instant `now` with the subject's salt and the key.
pub fn validate_token_at(token: &Token, salt: &[u8; 16], key: &[u8], now: &TimeRfc3339) -> (r: Result<()>)
    ensures
        r == token_check(token.ident@, token.exp@, token.sign_b64u@, salt@, key@, *now),
{
    let exp = match TimeRfc3339::parse_utc(token.exp.as_str()) {
        Ok(t) => t,
        Err(_) => return Err(Error::ExpNotIso),
    };
    let sign = match token_sign_into_b64u(token.ident.as_str(), token.exp.as_str(), salt, key) {
        Ok(s) => s,
        Err(e) => return Err(e),
    };
    proof {
        encode_utf8_decode_utf8(sign@);
        encode_utf8_decode_utf8(token.sign_b64u@);
    }
    if !constant_time_eq(sign.as_str().as_bytes(), token.sign_b64u.as_str().as_bytes()) {
        return Err(Error::SignatureNotMatching);
    }
    if exp.is_before(now) {
        return Err(Error::Expired);
    }
    Ok(())
}

/// Checks a token against the system clock; `TimeOutOfRange` where the
/// clock cannot be read.
pub fn validate_web_token(token: &Token, salt: &[u8; 16], key: &[u8]) -> (r: Result<()>)
    ensures
        !(r matches Err(Error::TimeOutOfRange(_))) ==> exists|now: TimeRfc3339|
            in_rfc3339_range(now.secs, now.nanos) && r == #[trigger] token_check(
                token.ident@,
                token.exp@,
                token.sign_b64u@,
                salt@,
                key@,
                now,
            ),
{
    match TimeRfc3339::now_utc() {
        Some(now) => validate_token_at(token, salt, key, &now),
        None => Err(Error::TimeOutOfRange(TimeOutOrRange(clock_out_of_range()))),
    }
}

/// Issues a token for `ident` that expires `duration_secs` seconds after `now`.
pub fn generate_token_at(
    ident: &str,
    now: &TimeRfc3339,
    duration_secs: i64,
    salt: &[u8; 16],
    key: &[u8],
) -> (r: Result<Token>)
    ensures
        match plus_secs_text(*now, duration_secs as int) {
            Some(exp) => r matches Ok(t) && t.ident@ == ident@ && t.exp@ == exp && t.sign_b64u@
                == signature_of(ident@, exp, salt@, key@) && t.sign_b64u@.len() > 0,
            None => r matches Err(Error::TimeOutOfRange(_)),
        },
        r matches Ok(t) ==> reads_back_as_plus(t.exp@, *now, duration_secs as int) && t.exp@.len() > 0,
        plus_secs_in_range(*now, duration_secs as int) ==> r is Ok,
{
    let exp = match now.plus_sec_str(duration_secs) {
        Ok(e) => e,
        Err(e) => return Err(Error::TimeOutOfRange(e)),
    };
    let sign_b64u = match token_sign_into_b64u(ident, exp.as_str(), salt, key) {
        Ok(s) => s,
        Err(e) => return Err(e),
    };
    Ok(Token { ident: ident.to_owned(), exp, sign_b64u })
}

/// Issues a token for `ident` that expires `duration_secs` seconds from now;
/// `TimeOutOfRange` where the clock cannot be read or the expiry cannot be written.
pub fn generate_web_token(ident: &str, duration_secs: i64, salt: &[u8; 16], key: &[u8]) -> (r: Result<Token>)
    ensures
        r matches Ok(t) ==> exists|now: TimeRfc3339|
            in_rfc3339_range(now.secs, now.nanos) && #[trigger] plus_secs_text(now, duration_secs as int) == Some(
                t.exp@,
            ) && t.ident@ == ident@ && t.sign_b64u@ == signature_of(ident@, t.exp@, salt@, key@)
                && t.sign_b64u@.len() > 0 && reads_back_as_plus(t.exp@, now, duration_secs as int),
        r matches Err(e) ==> e is TimeOutOfRange,
{
    match TimeRfc3339::now_utc() {
        Some(now) => generate_token_at(ident, &now, duration_secs, salt, key),
        None => Err(Error::TimeOutOfRange(TimeOutOrRange(clock_out_of_range()))),
    }
}

/// Reads a token text and checks it at `now`; gives the subject it proves.
pub fn parse_and_verify_at(token_str: &str, salt: &[u8; 16], key: &[u8], now: &TimeRfc3339) -> (r: Result<String>)
    ensures
        match verified_subject(token_str@, salt@, key@, *now) {
            Ok(ident) => r matches Ok(s) && s@ == ident,
            Err(e) => r == Err::<String, Error>(e),
        },
{
    let token = Token::parse(token_str)?;
    validate_token_at(&token, salt, key, now)?;
    Ok(token.ident)
}

/// Reads a token text, looks the salt of its subject up with `salt_lookup`,
/// and checks the token at `now`; gives the subject it proves.
pub fn parse_and_verify_with<F: Fn(&str) -> [u8; 16]>(
    token_str: &str,
    salt_lookup: F,
    key: &[u8],
    now: &TimeRfc3339,
) -> (r: Result<String>)
    requires
        forall|s: &str| salt_lookup.requires((s,)),
    ensures
        match parsed_token(token_str@) {
            Err(e) => r == Err::<String, Error>(e),
            Ok((ident, exp, sign)) => exists|s: &str, salt: [u8; 16]|
                s@ == ident && #[trigger] salt_lookup.ensures((s,), salt) && match token_check(
                    ident,
                    exp,
                    sign,
                    salt@,
                    key@,
                    *now,
                ) {
                    Err(e) => r == Err::<String, Error>(e),
                    Ok(_) => r matches Ok(v) && v@ == ident,
                },
        },
{
    let token = Token::parse(token_str)?;
    let salt = salt_lookup(token.ident.as_str());
    validate_token_at(&token, &salt, key, now)?;
    Ok(token.ident)
}

/// Reads a token text and checks it against the system clock;
/// `TimeOutOfRange` where the clock cannot be read.
pub fn parse_and_verify(token_str: &str, salt: &[u8; 16], key: &[u8]) -> (r: Result<String>)
    ensures
        !(r matches Err(Error::TimeOutOfRange(_))) ==> exists|now: TimeRfc3339|
            in_rfc3339_range(now.secs, now.nanos) && match #[trigger] verified_subject(token_str@, salt@, key@, now) {
                Ok(ident) => r matches Ok(s) && s@ == ident,
                Err(e) => r == Err::<String, Error>(e),
            },
{
    match TimeRfc3339::now_utc() {
        Some(now) => parse_and_verify_at(token_str, salt, key, &now),
        None => Err(Error::TimeOutOfRange(TimeOutOrRange(clock_out_of_range()))),
    }
}

} // verus!
