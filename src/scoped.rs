//! Scoped search keys: a root key, a filter and an expiry, signed and packed
//! into a token that the server can check against the root key.
use crate::keys::ClientKeys;
use hmac::{Mac, NewMac};
use vstd::prelude::*;
use vstd::string::{is_ascii_spec_bytes, StringSliceAdditionalSpecFns};
use vstd::utf8::is_ascii_chars;

verus! {

/// Why a scoped search key could not be generated.
#[derive(Debug, Clone, Copy, PartialEq, Eq, Structural)]
pub enum ScopedKeyError {
    /// The root key is shorter than the key prefix.
    InvalidKey,
    /// The parameters could not be encoded.
    EncodingFailure,
}

/// Number of root key bytes that travel in clear inside the token.
pub const KEY_PREFIX_LEN: usize = 4;

#[verifier::external_type_specification]
#[verifier::external_body]
pub struct ExJsonError(serde_json::Error);

/// The HMAC-SHA256 tag of `msg` under `key`.
pub uninterp spec fn hmac_sha256_of(key: Seq<u8>, msg: Seq<u8>) -> Seq<u8>;

/// The standard, padded base64 text of `bytes`.
pub uninterp spec fn base64_of(bytes: Seq<u8>) -> Seq<char>;

/// Relies on hmac's `Hmac::<Sha256>::new_from_slice`, `update` and `finalize`:
/// a 32-byte tag that depends on the key and the message alone. Any key
/// length is accepted (long keys are hashed, short ones padded).
#[verifier::external_body]
fn hmac_sha256(key: &[u8], msg: &[u8]) -> (r: Vec<u8>)
    ensures
        r@ == hmac_sha256_of(key@, msg@),
        r@.len() == 32,
{
    let mut mac = hmac::Hmac::<sha2::Sha256>::new_from_slice(key).unwrap();
    mac.update(msg);
    mac.finalize().into_bytes().to_vec()
}

/// Relies on `base64::encode` (standard alphabet, with padding): four ASCII
/// characters for each started group of three bytes, from which the bytes
/// decode back.
#[verifier::external_body]
fn base64_encode(bytes: &[u8]) -> (r: String)
    ensures
        r@ == base64_of(bytes@),
        r@.len() == 4 * ((bytes@.len() + 2) / 3),
        is_ascii_chars(r@),
        forall|other: Seq<u8>| #[trigger] base64_of(other) == r@ ==> other == bytes@,
{
    base64::encode(bytes)
}

/// Lower-case hexadecimal digit of `d`, for `d < 16`.
pub open spec fn hex_digit(d: u8) -> u8 {
    if d < 10 { (48 + d) as u8 } else { (87 + d) as u8 }
}

/// How one byte of a string appears inside a JSON string literal.
pub open spec fn escape_byte(b: u8) -> Seq<u8> {
    if b == 0x22 {
        seq![0x5cu8, 0x22u8]
    } else if b == 0x5c {
        seq![0x5cu8, 0x5cu8]
    } else if b == 0x08 {
        seq![0x5cu8, 0x62u8]
    } else if b == 0x09 {
        seq![0x5cu8, 0x74u8]
    } else if b == 0x0a {
        seq![0x5cu8, 0x6eu8]
    } else if b == 0x0c {
        seq![0x5cu8, 0x66u8]
    } else if b == 0x0d {
        seq![0x5cu8, 0x72u8]
    } else if b < 0x20 {
        seq![0x5cu8, 0x75u8, 0x30u8, 0x30u8, hex_digit(b / 16), hex_digit(b % 16)]
    } else {
        seq![b]
    }
}

/// The escaped body of a JSON string literal.
pub open spec fn escape_bytes(s: Seq<u8>) -> Seq<u8>
    decreases s.len(),
{
    if s.len() == 0 {
        Seq::empty()
    } else {
        escape_byte(s[0]) + escape_bytes(s.drop_first())
    }
}

/// The JSON string literal of `s`: quoted and escaped.
pub open spec fn json_string(s: Seq<u8>) -> Seq<u8> {
    seq![0x22u8] + escape_bytes(s) + seq![0x22u8]
}

/// Relies on `serde_json::to_vec` on a `str`: the JSON string literal of its
/// UTF-8 bytes, where `"`, `\` and the bytes below 0x20 are escaped. It
/// writes into a `Vec`, which never fails, so the result is always `Ok`.
#[verifier::external_body]
fn json_quote(s: &str) -> (r: Result<Vec<u8>, serde_json::Error>)
    ensures
        r is Ok,
        r matches Ok(v) ==> v@ == json_string(s.spec_bytes()),
{
    serde_json::to_vec(s)
}

/// Decimal digits of `n`, without leading zeros.
pub open spec fn decimal(n: nat) -> Seq<u8>
    decreases n,
{
    if n < 10 {
        seq![(48 + n) as u8]
    } else {
        decimal(n / 10) + seq![(48 + n % 10) as u8]
    }
}

/// `{"filter_by":`
pub open spec fn filter_field() -> Seq<u8> {
    seq![123u8, 34, 102, 105, 108, 116, 101, 114, 95, 98, 121, 34, 58]
}

/// `,"expires_at":`
pub open spec fn expires_field() -> Seq<u8> {
    seq![44u8, 34, 101, 120, 112, 105, 114, 101, 115, 95, 97, 116, 34, 58]
}

/// The canonical parameters: `{"filter_by":<quoted>,"expires_at":<digits>}`.
pub open spec fn canonical(quoted: Seq<u8>, expires_at: nat) -> Seq<u8> {
    filter_field() + quoted + expires_field() + decimal(expires_at) + seq![125u8]
}

/// The canonical parameters of a filter and an expiry, as signed.
pub open spec fn scoped_params(filter_by: Seq<u8>, expires_at: nat) -> Seq<u8> {
    canonical(json_string(filter_by), expires_at)
}

/// The bytes of an ASCII text.
pub open spec fn ascii_bytes(cs: Seq<char>) -> Seq<u8> {
    Seq::new(cs.len(), |i: int| cs[i] as u8)
}

/// The inner layer of a token: base64 tag, key prefix, parameters.
pub open spec fn raw_scoped_key(digest: Seq<u8>, key: Seq<u8>, params: Seq<u8>) -> Seq<u8> {
    digest + key.subrange(0, KEY_PREFIX_LEN as int) + params
}

/// The base64 text of the HMAC-SHA256 tag of `params` under `key`, as bytes.
pub open spec fn scoped_digest(key: Seq<u8>, params: Seq<u8>) -> Seq<u8> {
    ascii_bytes(base64_of(hmac_sha256_of(key, params)))
}

/// The inner layer of the token for these inputs.
pub open spec fn scoped_inner(key: Seq<u8>, filter_by: Seq<u8>, expires_at: nat) -> Seq<u8> {
    let params = scoped_params(filter_by, expires_at);
    raw_scoped_key(scoped_digest(key, params), key, params)
}

/// The scoped search key token for these inputs.
pub open spec fn scoped_token(key: Seq<u8>, filter_by: Seq<u8>, expires_at: nat) -> Seq<char> {
    base64_of(scoped_inner(key, filter_by, expires_at))
}

/// Length of the base64 text of a 32-byte tag.
pub const DIGEST_TEXT_LEN: usize = 44;

/// `t` is the token of these inputs, and the only bytes whose base64 text
/// is `t` are the token's inner layer, which starts with a tag text of
/// `DIGEST_TEXT_LEN` bytes; `t` is ASCII, four characters for each started
/// group of three inner bytes.
pub open spec fn is_scoped_token(t: Seq<char>, key: Seq<u8>, filter_by: Seq<u8>, expires_at: nat) -> bool {
    &&& t == scoped_token(key, filter_by, expires_at)
    &&& forall|raw: Seq<u8>| #[trigger] base64_of(raw) == t ==> raw == scoped_inner(key, filter_by, expires_at)
    &&& scoped_digest(key, scoped_params(filter_by, expires_at)).len() == DIGEST_TEXT_LEN
    &&& is_ascii_chars(t)
    &&& t.len() == 4 * ((scoped_inner(key, filter_by, expires_at).len() + 2) / 3)
}

/// Value of a lower-case hexadecimal digit, if `c` is one.
pub open spec fn hex_value(c: u8) -> Option<u8> {
    if 48 <= c <= 57 {
        Some((c - 48) as u8)
    } else if 97 <= c <= 102 {
        Some((c - 87) as u8)
    } else {
        None
    }
}

/// The byte that a `\uXXXX` escape with these four digits stands for, when
/// it stands for one below 0x100.
pub open spec fn unicode_escape(s: Seq<u8>) -> Option<u8> {
    if s.len() >= 4 && s[0] == 0x30 && s[1] == 0x30 {
        match (hex_value(s[2]), hex_value(s[3])) {
            (Some(h), Some(l)) => Some((h * 16 + l) as u8),
            _ => None,
        }
    } else {
        None
    }
}

/// The byte that a two-byte escape `\c` stands for.
pub open spec fn short_escape(c: u8) -> Option<u8> {
    if c == 0x22 {
        Some(0x22u8)
    } else if c == 0x5c {
        Some(0x5cu8)
    } else if c == 0x62 {
        Some(0x08u8)
    } else if c == 0x74 {
        Some(0x09u8)
    } else if c == 0x6e {
        Some(0x0au8)
    } else if c == 0x66 {
        Some(0x0cu8)
    } else if c == 0x72 {
        Some(0x0du8)
    } else {
        None
    }
}

/// Reads the body of a JSON string literal up to its closing quote: the
/// unescaped bytes and what follows the quote.
pub open spec fn read_string(s: Seq<u8>) -> Option<(Seq<u8>, Seq<u8>)>
    decreases s.len(),
{
    if s.len() == 0 {
        None
    } else if s[0] == 0x22 {
        Some((Seq::empty(), s.drop_first()))
    } else if s[0] == 0x5c {
        if s.len() < 2 {
            None
        } else if s[1] == 0x75 {
            match unicode_escape(s.subrange(2, s.len() as int)) {
                Some(b) => match read_string(s.subrange(6, s.len() as int)) {
                    Some((d, rest)) => Some((seq![b] + d, rest)),
                    None => None,
                },
                None => None,
            }
        } else {
            match short_escape(s[1]) {
                Some(b) => match read_string(s.subrange(2, s.len() as int)) {
                    Some((d, rest)) => Some((seq![b] + d, rest)),
                    None => None,
                },
                None => None,
            }
        }
    } else {
        match read_string(s.drop_first()) {
            Some((d, rest)) => Some((seq![s[0]] + d, rest)),
            None => None,
        }
    }
}

/// Every byte is an ASCII digit.
pub open spec fn all_digits(s: Seq<u8>) -> bool {
    forall|i: int| 0 <= i < s.len() ==> 48 <= #[trigger] s[i] <= 57
}

/// The number that a run of decimal digits writes.
pub open spec fn digits_value(s: Seq<u8>) -> nat
    decreases s.len(),
{
    if s.len() == 0 {
        0
    } else {
        digits_value(s.drop_last()) * 10 + (s.last() - 48) as nat
    }
}

/// Reads `,"expires_at":<digits>}` to its end.
pub open spec fn read_expiry(s: Seq<u8>) -> Option<nat> {
    let n = expires_field().len() as int;
    let digits = s.subrange(n, s.len() - 1);
    if s.len() > n + 1 && s.subrange(0, n) == expires_field() && s.last() == 125
        && all_digits(digits) {
        Some(digits_value(digits))
    } else {
        None
    }
}

/// Decodes canonical parameters back into the filter's bytes and the expiry.
pub open spec fn parse_params(b: Seq<u8>) -> Option<(Seq<u8>, nat)> {
    let n = filter_field().len() as int;
    if b.len() > n && b.subrange(0, n) == filter_field() && b[n] == 0x22 {
        match read_string(b.subrange(n + 1, b.len() as int)) {
            Some((f, rest)) => match read_expiry(rest) {
                Some(e) => Some((f, e)),
                None => None,
            },
            None => None,
        }
    } else {
        None
    }
}

proof fn lemma_read_escaped(f: Seq<u8>, rest: Seq<u8>)
    ensures
        read_string(escape_bytes(f) + seq![0x22u8] + rest) == Some((f, rest)),
    decreases f.len(),
{
    let s = escape_bytes(f) + seq![0x22u8] + rest;
    if f.len() == 0 {
        assert(s =~= seq![0x22u8] + rest);
        assert(s.drop_first() =~= rest);
    } else {
        let b = f[0];
        let tail = escape_bytes(f.drop_first()) + seq![0x22u8] + rest;
        lemma_read_escaped(f.drop_first(), rest);
        let e = escape_byte(b);
        assert(s =~= e + tail);
        assert(seq![b] + f.drop_first() =~= f);
        if e.len() == 1 {
            assert(s.drop_first() =~= tail);
        } else if e.len() == 2 {
            assert(s.subrange(2, s.len() as int) =~= tail);
        } else {
            assert(s.subrange(6, s.len() as int) =~= tail);
            let u = s.subrange(2, s.len() as int);
            assert(u[2] == hex_digit(b / 16) && u[3] == hex_digit(b % 16));
            assert(b / 16 < 2);
            assert(hex_value(hex_digit(b / 16)) == Some(b / 16));
            assert(hex_value(hex_digit(b % 16)) == Some(b % 16));
            assert(unicode_escape(u) == Some(b));
        }
    }
}

proof fn lemma_decimal(n: nat)
    ensures
        decimal(n).len() > 0,
        all_digits(decimal(n)),
        digits_value(decimal(n)) == n,
    decreases n,
{
    if n >= 10 {
        lemma_decimal(n / 10);
        let d = decimal(n);
        assert(d.drop_last() =~= decimal(n / 10));
        assert(d.last() == (48 + n % 10) as u8);
        assert((n / 10) * 10 + n % 10 == n) by (nonlinear_arith);
        assert(all_digits(d)) by {
            assert forall|i: int| 0 <= i < d.len() implies 48 <= #[trigger] d[i] <= 57 by {
                if i < d.len() - 1 {
                    assert(d[i] == decimal(n / 10)[i]);
                }
            }
        }
    } else {
        assert(decimal(n).drop_last() =~= Seq::<u8>::empty());
        assert(digits_value(Seq::<u8>::empty()) == 0);
        assert(decimal(n).last() == (48 + n) as u8);
    }
}

/// Decoding the canonical parameters gives back exactly the filter's bytes
/// and the expiry that were encoded.
pub proof fn lemma_params_round_trip(filter_by: Seq<u8>, expires_at: nat)
    ensures
        parse_params(scoped_params(filter_by, expires_at)) == Some((filter_by, expires_at)),
{
    let ff = filter_field();
    let ef = expires_field();
    let d = decimal(expires_at);
    let tail = ef + d + seq![125u8];
    let b = scoped_params(filter_by, expires_at);
    assert(b =~= ff + (seq![0x22u8] + (escape_bytes(filter_by) + seq![0x22u8] + tail)));
    assert(b.subrange(0, 13) =~= ff);
    assert(b.subrange(14, b.len() as int) =~= escape_bytes(filter_by) + seq![0x22u8] + tail);
    lemma_read_escaped(filter_by, tail);
    lemma_decimal(expires_at);
    assert(tail.subrange(0, 14) =~= ef);
    assert(tail.subrange(14, tail.len() - 1) =~= d);
}

/// Two tokens of the same root key, filter and expiry are the same token.
pub proof fn lemma_deterministic(
    t1: Seq<char>,
    t2: Seq<char>,
    key: Seq<u8>,
    filter_by: Seq<u8>,
    expires_at: nat,
)
    requires
        is_scoped_token(t1, key, filter_by, expires_at),
        is_scoped_token(t2, key, filter_by, expires_at),
    ensures
        t1 == t2,
{
}

/// Any bytes that the token decodes to carry the first `KEY_PREFIX_LEN`
/// bytes of the root key right after the tag text, followed by parameters
/// that decode to the filter and the expiry.
pub proof fn lemma_token_layout(
    t: Seq<char>,
    key: Seq<u8>,
    filter_by: Seq<u8>,
    expires_at: nat,
    raw: Seq<u8>,
)
    requires
        key.len() >= KEY_PREFIX_LEN,
        is_scoped_token(t, key, filter_by, expires_at),
        base64_of(raw) == t,
    ensures
        raw.subrange(DIGEST_TEXT_LEN as int, DIGEST_TEXT_LEN + KEY_PREFIX_LEN) == key.subrange(0, KEY_PREFIX_LEN as int),
        parse_params(raw.subrange(DIGEST_TEXT_LEN + KEY_PREFIX_LEN, raw.len() as int)) == Some((filter_by, expires_at)),
{
    let params = scoped_params(filter_by, expires_at);
    let digest = scoped_digest(key, params);
    assert(raw == digest + key.subrange(0, 4) + params);
    assert(raw.subrange(44, 48) =~= key.subrange(0, 4));
    assert(raw.subrange(48, raw.len() as int) =~= params);
    lemma_params_round_trip(filter_by, expires_at);
}

/// Tokens of inputs that differ in the filter, in the expiry or in the
/// root key's prefix differ.
pub proof fn lemma_sensitive(
    t1: Seq<char>,
    key1: Seq<u8>,
    filter1: Seq<u8>,
    expires1: nat,
    t2: Seq<char>,
    key2: Seq<u8>,
    filter2: Seq<u8>,
    expires2: nat,
)
    requires
        key1.len() >= KEY_PREFIX_LEN,
        key2.len() >= KEY_PREFIX_LEN,
        is_scoped_token(t1, key1, filter1, expires1),
        is_scoped_token(t2, key2, filter2, expires2),
        filter1 != filter2 || expires1 != expires2 || key1.subrange(0, KEY_PREFIX_LEN as int)
            != key2.subrange(0, KEY_PREFIX_LEN as int),
    ensures
        t1 != t2,
{
    if t1 == t2 {
        let raw = scoped_inner(key1, filter1, expires1);
        lemma_token_layout(t1, key1, filter1, expires1, raw);
        lemma_token_layout(t2, key2, filter2, expires2, raw);
    }
}

fn push_bytes(v: &mut Vec<u8>, s: &[u8])
    ensures
        final(v)@ == old(v)@ + s@,
{
    let mut i: usize = 0;
    while i < s.len()
        invariant
            i <= s@.len(),
            v@ == old(v)@ + s@.subrange(0, i as int),
        decreases s@.len() - i,
    {
        v.push(s[i]);
        i = i + 1;
        assert(s@.subrange(0, i as int) == s@.subrange(0, i - 1) + seq![s@[i - 1]]);
    }
    assert(s@.subrange(0, s@.len() as int) == s@);
}

fn push_decimal(v: &mut Vec<u8>, n: usize)
    ensures
        final(v)@ == old(v)@ + decimal(n as nat),
    decreases n,
{
    if n >= 10 {
        push_decimal(v, n / 10);
    }
    v.push((48 + n % 10) as u8);
    assert(v@ == old(v)@ + decimal(n as nat));
}

/// Frames the JSON-quoted filter and the expiry into the canonical
/// parameters that are signed.
pub fn canonical_params(quoted: &[u8], expires_at: usize) -> (r: Vec<u8>)
    ensures
        r@ == canonical(quoted@, expires_at as nat),
{
    let head: [u8; 13] = [123, 34, 102, 105, 108, 116, 101, 114, 95, 98, 121, 34, 58];
    let mid: [u8; 14] = [44, 34, 101, 120, 112, 105, 114, 101, 115, 95, 97, 116, 34, 58];
    assert(head@ == filter_field());
    assert(mid@ == expires_field());
    let mut r: Vec<u8> = Vec::new();
    push_bytes(&mut r, &head);
    push_bytes(&mut r, quoted);
    push_bytes(&mut r, &mid);
    push_decimal(&mut r, expires_at);
    r.push(125);
    r
}

/// Lays out the inner layer of a token: the base64 tag, the first
/// `KEY_PREFIX_LEN` bytes of the root key, then the parameters.
pub fn assemble_raw_key(digest: &[u8], key: &[u8], params: &[u8]) -> (r: Vec<u8>)
    requires
        key@.len() >= KEY_PREFIX_LEN,
    ensures
        r@ == raw_scoped_key(digest@, key@, params@),
{
    let mut r: Vec<u8> = Vec::new();
    push_bytes(&mut r, digest);
    let prefix = vstd::slice::slice_subrange(key, 0, KEY_PREFIX_LEN);
    push_bytes(&mut r, prefix);
    push_bytes(&mut r, params);
    r
}

impl<'a> ClientKeys<'a> {

/// Generates a scoped search key from a root key, a filter and an expiry
/// (seconds since the epoch).
pub fn generate_scoped_search_key(key: &str, filter_by: &str, expires_at: usize) -> (r: Result<
    String,
    ScopedKeyError,
>)
    ensures
        key.spec_bytes().len() < KEY_PREFIX_LEN <==> r == Err::<String, ScopedKeyError>(
            ScopedKeyError::InvalidKey,
        ),
        key.spec_bytes().len() >= KEY_PREFIX_LEN ==> r is Ok,
        r matches Ok(t) ==> is_scoped_token(
            t@,
            key.spec_bytes(),
            filter_by.spec_bytes(),
            expires_at as nat,
        ),
{
    let key_bytes = key.as_bytes();
    if key_bytes.len() < KEY_PREFIX_LEN {
        return Err(ScopedKeyError::InvalidKey);
    }
    let quoted = match json_quote(filter_by) {
        Ok(q) => q,
        Err(_) => return Err(ScopedKeyError::EncodingFailure),
    };
    let params = canonical_params(quoted.as_slice(), expires_at);
    let tag = hmac_sha256(key_bytes, params.as_slice());
    let digest = base64_encode(tag.as_slice());
    let digest_str = digest.as_str();
    proof {
        is_ascii_spec_bytes(digest_str);
        assert(digest_str.spec_bytes() =~= ascii_bytes(digest@));
    }
    let raw = assemble_raw_key(digest_str.as_bytes(), key_bytes, params.as_slice());
    Ok(base64_encode(raw.as_slice()))
}

}

} // verus!
