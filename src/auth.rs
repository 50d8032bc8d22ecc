//! The per-request signature: an HMAC-SHA256 of the client id and the
//! time, keyed with the client secret and written in base64.
use vstd::prelude::*;
use vstd::utf8::{encode_utf8, encode_utf8_decode_utf8};
use crate::text::{append_str, decimal, digit_char, digits_value, push_decimal, string_of};

verus! {

/// The three header values that authenticate one request.
#[derive(Debug, Clone)]
pub struct SignedHeaders {
    /// The `authorization` value: the base64 signature.
    pub access_token: String,
    /// The `S-ClientId` value.
    pub client_id: String,
    /// The `S-Timestamp` value: milliseconds since the Unix epoch, in decimal.
    pub timestamp: String,
}

/// The HMAC-SHA256 tag of `msg` under `key`.
pub uninterp spec fn hmac_sha256_of(key: Seq<u8>, msg: Seq<u8>) -> Seq<u8>;

/// The symbol of a six-bit value in the standard base64 alphabet.
pub open spec fn base64_symbol(v: int) -> char {
    if v < 26 {
        (v + 65) as char
    } else if v < 52 {
        (v + 71) as char
    } else if v < 62 {
        (v - 4) as char
    } else if v == 62 {
        '+'
    } else {
        '/'
    }
}

/// Standard base64 with padding: each three bytes become four symbols, and
/// a last group of one or two bytes is padded with `=` to four.
pub open spec fn base64_spec(b: Seq<u8>) -> Seq<char>
    decreases b.len(),
{
    if b.len() == 0 {
        seq![]
    } else {
        let x = b[0] as int;
        let y = if b.len() > 1 { b[1] as int } else { 0 };
        let z = if b.len() > 2 { b[2] as int } else { 0 };
        if b.len() == 1 {
            seq![base64_symbol(x / 4), base64_symbol((x % 4) * 16), '=', '=']
        } else if b.len() == 2 {
            seq![base64_symbol(x / 4), base64_symbol((x % 4) * 16 + y / 16), base64_symbol((y % 16) * 4), '=']
        } else {
            seq![
                base64_symbol(x / 4),
                base64_symbol((x % 4) * 16 + y / 16),
                base64_symbol((y % 16) * 4 + z / 64),
                base64_symbol(z % 64),
            ] + base64_spec(b.subrange(3, b.len() as int))
        }
    }
}

/// The message that is signed: `Trimlight|<client id>|<timestamp>`.
pub open spec fn signing_message(client_id: Seq<char>, timestamp_ms: nat) -> Seq<char> {
    "Trimlight|"@ + client_id + "|"@ + decimal(timestamp_ms)
}

/// The tag over the UTF-8 bytes of the message, keyed with those of the
/// secret.
pub open spec fn signature_of(client_id: Seq<char>, secret: Seq<char>, timestamp_ms: nat) -> Seq<
    u8,
> {
    hmac_sha256_of(encode_utf8(secret), encode_utf8(signing_message(client_id, timestamp_ms)))
}

/// `h` holds the headers for `client_id` and `secret` at `timestamp_ms`.
pub open spec fn signed_for(
    h: SignedHeaders,
    client_id: Seq<char>,
    secret: Seq<char>,
    timestamp_ms: nat,
) -> bool {
    &&& h.access_token@ == base64_spec(signature_of(client_id, secret, timestamp_ms))
    &&& signature_of(client_id, secret, timestamp_ms).len() == 32
    &&& h.client_id@ == client_id
    &&& h.timestamp@ == decimal(timestamp_ms)
}

/// Relies on `Hmac::<Sha256>` of the hmac and sha2 crates: the tag of `msg`
/// under `key`, which any key length is accepted for, 32 bytes long.
#[verifier::external_body]
fn hmac_sha256(key: &[u8], msg: &[u8]) -> (r: Vec<u8>)
    ensures
        r@ == hmac_sha256_of(key@, msg@),
        r@.len() == 32,
{
    let mut mac = <hmac::Hmac<sha2::Sha256> as hmac::Mac>::new_from_slice(key).expect(
        "any key length",
    );
    hmac::Mac::update(&mut mac, msg);
    hmac::Mac::finalize(mac).into_bytes().to_vec()
}

/// Relies on base64's `STANDARD` engine: padded standard base64.
#[verifier::external_body]
fn base64_encode(b: &[u8]) -> (r: String)
    ensures
        r@ == base64_spec(b@),
{
    base64::Engine::encode(&base64::engine::general_purpose::STANDARD, b)
}

/// The text that is signed for `client_id` at `timestamp_ms`.
pub fn message_to_sign(client_id: &str, timestamp_ms: u64) -> (r: String)
    ensures
        r@ == signing_message(client_id@, timestamp_ms as nat),
{
    let mut msg: Vec<char> = Vec::new();
    append_str(&mut msg, "Trimlight|");
    append_str(&mut msg, client_id);
    append_str(&mut msg, "|");
    push_decimal(&mut msg, timestamp_ms);
    assert(msg@ =~= signing_message(client_id@, timestamp_ms as nat));
    string_of(&msg)
}

/// The headers that carry a computed tag: the tag in base64, the client id,
/// and the time in decimal.
pub fn headers_from_tag(tag: &[u8], client_id: &str, timestamp_ms: u64) -> (r: SignedHeaders)
    ensures
        r.access_token@ == base64_spec(tag@),
        r.client_id@ == client_id@,
        r.timestamp@ == decimal(timestamp_ms as nat),
{
    let mut stamp: Vec<char> = Vec::new();
    push_decimal(&mut stamp, timestamp_ms);
    assert(stamp@ =~= decimal(timestamp_ms as nat));
    SignedHeaders {
        access_token: base64_encode(tag),
        client_id: client_id.to_string(),
        timestamp: string_of(&stamp),
    }
}

/// Signs a request made at `timestamp_ms` (milliseconds since the Unix
/// epoch) for `client_id` with `client_secret`.
pub fn sign(client_id: &str, client_secret: &str, timestamp_ms: u64) -> (r: SignedHeaders)
    ensures
        signed_for(r, client_id@, client_secret@, timestamp_ms as nat),
{
    let message = message_to_sign(client_id, timestamp_ms);
    let tag = hmac_sha256(client_secret.as_bytes(), message.as_str().as_bytes());
    headers_from_tag(tag.as_slice(), client_id, timestamp_ms)
}

proof fn lemma_digits_of_decimal(n: nat)
    ensures
        digits_value(decimal(n)) == n,
    decreases n,
{
    if n >= 10 {
        lemma_digits_of_decimal(n / 10);
        let s = decimal(n);
        assert(s.drop_last() =~= decimal(n / 10));
        assert(s.last() == digit_char((n % 10) as nat));
        assert(digit_char((n % 10) as nat) as nat == n % 10 + 48);
        assert(digits_value(s) == digits_value(decimal(n / 10)) * 10 + n % 10);
        assert(n == (n / 10) * 10 + n % 10);
    } else {
        let s = decimal(n);
        assert(s.drop_last() =~= Seq::<char>::empty());
        assert(s.last() == digit_char(n));
        assert(digit_char(n) as nat == n + 48);
        assert(digits_value(s) == digits_value(Seq::<char>::empty()) * 10 + n);
    }
}

/// Distinct times give distinct signed messages, as characters and as the
/// bytes the HMAC is taken over, so the tags differ unless HMAC-SHA256
/// collides.
pub proof fn lemma_timestamp_changes_message(client_id: Seq<char>, t1: nat, t2: nat)
    requires
        t1 != t2,
    ensures
        signing_message(client_id, t1) != signing_message(client_id, t2),
        encode_utf8(signing_message(client_id, t1)) != encode_utf8(
            signing_message(client_id, t2),
        ),
{
    encode_utf8_decode_utf8(signing_message(client_id, t1));
    encode_utf8_decode_utf8(signing_message(client_id, t2));
    let m1 = signing_message(client_id, t1);
    let m2 = signing_message(client_id, t2);
    reveal_strlit("Trimlight|");
    reveal_strlit("|");
    let k = ("Trimlight|"@.len() + client_id.len() + 1) as int;
    if m1 == m2 {
        assert(m1.subrange(k, m1.len() as int) =~= decimal(t1));
        assert(m2.subrange(k, m2.len() as int) =~= decimal(t2));
        lemma_digits_of_decimal(t1);
        lemma_digits_of_decimal(t2);
    }
}

/// Distinct client ids give distinct signed messages at the same time, as
/// characters and as bytes, so the tags differ unless HMAC-SHA256 collides.
pub proof fn lemma_client_id_changes_message(c1: Seq<char>, c2: Seq<char>, t: nat)
    requires
        c1 != c2,
    ensures
        signing_message(c1, t) != signing_message(c2, t),
        encode_utf8(signing_message(c1, t)) != encode_utf8(signing_message(c2, t)),
{
    encode_utf8_decode_utf8(signing_message(c1, t));
    encode_utf8_decode_utf8(signing_message(c2, t));
    let m1 = signing_message(c1, t);
    let m2 = signing_message(c2, t);
    reveal_strlit("Trimlight|");
    reveal_strlit("|");
    let p = "Trimlight|"@.len() as int;
    if m1 == m2 {
        assert(m1.len() == p + c1.len() + 1 + decimal(t).len());
        assert(c1.len() == c2.len());
        assert(m1.subrange(p, p + c1.len() as int) =~= c1);
        assert(m2.subrange(p, p + c2.len() as int) =~= c2);
    }
}

/// Signing is a function of its inputs: two header sets made for the same
/// client id, secret and time are equal.
pub proof fn lemma_sign_deterministic(
    h1: SignedHeaders,
    h2: SignedHeaders,
    client_id: Seq<char>,
    secret: Seq<char>,
    timestamp_ms: nat,
)
    requires
        signed_for(h1, client_id, secret, timestamp_ms),
        signed_for(h2, client_id, secret, timestamp_ms),
    ensures
        h1.access_token@ == h2.access_token@,
        h1.client_id@ == h2.client_id@,
        h1.timestamp@ == h2.timestamp@,
{
}

proof fn lemma_base64_symbol_not_pad(v: int)
    requires
        0 <= v < 64,
    ensures
        base64_symbol(v) != '=',
{
}

proof fn lemma_base64_shape(b: Seq<u8>)
    ensures
        base64_spec(b).len() == 4 * ((b.len() + 2) / 3),
        b.len() > 0 ==> {
            let e = base64_spec(b);
            let n = e.len() as int;
            &&& b.len() % 3 == 1 ==> e[n - 1] == '=' && e[n - 2] == '='
            &&& b.len() % 3 == 2 ==> e[n - 1] == '=' && e[n - 2] != '='
            &&& b.len() % 3 == 0 ==> e[n - 1] != '='
        },
    decreases b.len(),
{
    if b.len() == 2 {
        lemma_base64_symbol_not_pad(((b[1] as int) % 16) * 4);
    } else if b.len() >= 3 {
        let rest = b.subrange(3, b.len() as int);
        lemma_base64_shape(rest);
        lemma_base64_symbol_not_pad((b[2] as int) % 64);
        let e = base64_spec(b);
        let er = base64_spec(rest);
        let n = e.len() as int;
        let m = er.len() as int;
        assert(n == 4 + m);
        if rest.len() > 0 {
            assert(e[n - 1] == er[m - 1]);
            assert(e[n - 2] == er[m - 2]);
        }
    }
}

/// Decoding an access token gives back exactly 32 bytes, the length of an
/// HMAC-SHA256 tag: every byte string whose standard base64 text is the token
/// is 32 bytes long.
pub proof fn lemma_access_token_decodes_to_32_bytes(
    h: SignedHeaders,
    client_id: Seq<char>,
    secret: Seq<char>,
    timestamp_ms: nat,
    bytes: Seq<u8>,
)
    requires
        signed_for(h, client_id, secret, timestamp_ms),
        base64_spec(bytes) == h.access_token@,
    ensures
        bytes.len() == 32,
{
    let tag = signature_of(client_id, secret, timestamp_ms);
    lemma_base64_shape(tag);
    lemma_base64_shape(bytes);
    assert(base64_spec(tag).len() == 44);
    assert(31 <= bytes.len() <= 33);
}

} // verus!
