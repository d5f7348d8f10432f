//! Digests, keyed digests and the encodings that they travel in.

use vstd::prelude::*;
use vstd::utf8::encode_utf8;
use crate::text::occurs_in;

verus! {

// ---------------------------------------------------------------------------
// Outside functions
// ---------------------------------------------------------------------------

/// The SHA-256 digest of bytes, as `sha2` computes it.
pub uninterp spec fn sha256(data: Seq<u8>) -> Seq<u8>;

/// The unpadded URL-safe base64 text of bytes, as `base64` writes it.
pub uninterp spec fn base64url(data: Seq<u8>) -> Seq<char>;

/// The bytes that `base64` reads in an unpadded URL-safe text, or nothing where it is none.
pub uninterp spec fn base64url_bytes(source: Seq<char>) -> Option<Seq<u8>>;

/// `sha2::Sha256::digest`: the result is named `sha256` and is 32 bytes long.
#[verifier::external_body]
fn sha256_of(data: &[u8]) -> (r: Vec<u8>)
    ensures
        r@ == sha256(data@),
        r@.len() == 32,
{
    <sha2::Sha256 as sha2::Digest>::digest(data).to_vec()
}

/// `encode` of the `base64` engine `URL_SAFE_NO_PAD`: the result is named `base64url`.
#[verifier::external_body]
fn base64url_of(data: &[u8]) -> (r: String)
    requires
        data@.len() <= usize::MAX / 4,
    ensures
        r@ == base64url(data@),
{
    base64::Engine::encode(&base64::engine::general_purpose::URL_SAFE_NO_PAD, data)
}

/// `decode` of the `base64` engine `URL_SAFE_NO_PAD`: the result is named `base64url_bytes`.
#[verifier::external_body]
fn base64url_read(source: &str) -> (r: Option<Vec<u8>>)
    ensures
        r is Some <==> base64url_bytes(source@) is Some,
        r is Some ==> r->0@ == base64url_bytes(source@)->0,
{
    base64::Engine::decode(&base64::engine::general_purpose::URL_SAFE_NO_PAD, source).ok()
}

/// `getrandom::fill` on a buffer of zeros: the bytes are up to chance. Where the system has no
/// randomness to give, what the buffer holds is left as it is.
#[verifier::external_body]
fn random_fill(len: usize) -> (r: Vec<u8>)
    requires
        len <= usize::MAX / 4,
    ensures
        r@.len() == len,
{
    let mut raw = vec![0u8; len];
    let _ = getrandom::fill(&mut raw);
    raw
}

/// `zeroize` on a `Vec<u8>`: it ends up empty. That the memory is overwritten first is not
/// stated.
#[verifier::external_body]
fn wipe(bytes: &mut Vec<u8>)
    ensures
        final(bytes)@ == Seq::<u8>::empty(),
{
    zeroize::Zeroize::zeroize(bytes)
}

// ---------------------------------------------------------------------------
// HMAC
// ---------------------------------------------------------------------------

/// The key block of HMAC-SHA-256: the key, or its digest where it is longer than a block,
/// filled up with zeros.
pub open spec fn key_block(key: Seq<u8>) -> Seq<u8> {
    let key = if key.len() > 64 {
        sha256(key)
    } else {
        key
    };
    Seq::new(
        64,
        |i: int|
            if i < key.len() {
                key[i]
            } else {
                0
            },
    )
}

/// `block` with every byte combined with `mask`.
pub open spec fn masked(block: Seq<u8>, mask: u8) -> Seq<u8> {
    block.map_values(|b: u8| mask ^ b)
}

/// HMAC with SHA-256.
pub open spec fn hmac(key: Seq<u8>, message: Seq<u8>) -> Seq<u8> {
    sha256(masked(key_block(key), 0x5c) + sha256(masked(key_block(key), 0x36) + message))
}

/// HMAC with SHA-256. The copies made of the key are wiped.
pub fn hmac_sha256(key: &[u8], message: &[u8]) -> (r: Vec<u8>)
    ensures
        r@ == hmac(key@, message@),
        r@.len() == 32,
{
    let mut block: Vec<u8> = if key.len() > 64 {
        sha256_of(key)
    } else {
        vstd::slice::slice_to_vec(key)
    };
    block.resize(64, 0);
    proof {
        assert(block@ =~= key_block(key@));
    }
    let mut inner: Vec<u8> = Vec::new();
    let mut outer: Vec<u8> = Vec::new();
    for i in 0..64usize
        invariant
            block@ == key_block(key@),
            inner@ == masked(block@, 0x36).take(i as int),
            outer@ == masked(block@, 0x5c).take(i as int),
    {
        inner.push(0x36 ^ block[i]);
        outer.push(0x5c ^ block[i]);
        proof {
            assert(masked(block@, 0x36).take(i + 1) =~= masked(block@, 0x36).take(i as int).push(
                0x36 ^ block@[i as int],
            ));
            assert(masked(block@, 0x5c).take(i + 1) =~= masked(block@, 0x5c).take(i as int).push(
                0x5c ^ block@[i as int],
            ));
        }
    }
    wipe(&mut block);
    proof {
        assert(inner@ =~= masked(key_block(key@), 0x36));
        assert(outer@ =~= masked(key_block(key@), 0x5c));
    }
    inner.extend_from_slice(message);
    proof {
        assert(inner@ =~= masked(key_block(key@), 0x36) + message@);
    }
    let inner_digest = sha256_of(&inner);
    wipe(&mut inner);
    outer.extend_from_slice(&inner_digest);
    proof {
        assert(outer@ =~= masked(key_block(key@), 0x5c) + inner_digest@);
    }
    let digest = sha256_of(&outer);
    wipe(&mut outer);
    digest
}

// ---------------------------------------------------------------------------
// Hexadecimal
// ---------------------------------------------------------------------------

/// The lower-case hexadecimal digit for a value below 16.
pub open spec fn hex_digit(n: u8) -> char {
    if n < 10 {
        (n + 48) as char
    } else {
        (n + 87) as char
    }
}

/// The lower-case hexadecimal text of bytes: two digits each.
pub open spec fn hex(bytes: Seq<u8>) -> Seq<char>
    decreases bytes.len(),
{
    if bytes.len() == 0 {
        seq![]
    } else {
        hex(bytes.drop_last()) + seq![hex_digit(bytes.last() / 16), hex_digit(bytes.last() % 16)]
    }
}

fn digit_char(n: u8) -> (r: char)
    requires
        n < 16,
    ensures
        r == hex_digit(n),
{
    if n < 10 {
        (n + 48) as char
    } else {
        (n + 87) as char
    }
}

/// The lower-case hexadecimal text of bytes.
pub fn hex_encode(bytes: &[u8]) -> (r: String)
    ensures
        r@ == hex(bytes@),
{
    let mut out = String::new();
    let mut i: usize = 0;
    while i < bytes.len()
        invariant
            i <= bytes@.len(),
            out@ == hex(bytes@.take(i as int)),
        decreases bytes@.len() - i,
    {
        let ghost before = out@;
        out.push(digit_char(bytes[i] / 16));
        out.push(digit_char(bytes[i] % 16));
        proof {
            assert(bytes@.take(i + 1).drop_last() =~= bytes@.take(i as int));
            assert(out@ =~= before + seq![
                hex_digit(bytes@[i as int] / 16),
                hex_digit(bytes@[i as int] % 16),
            ]);
        }
        i += 1;
    }
    proof {
        assert(bytes@.take(bytes@.len() as int) =~= bytes@);
    }
    out
}

/// The text by which the Codex backend knows a conversation: a keyed hash of its id.
pub open spec fn session_text(key: Seq<u8>, material: Seq<char>) -> Seq<char> {
    hex(hmac(key, encode_utf8(material)))
}

/// The text by which the Codex backend knows a conversation.
pub fn session_hmac(key: &[u8], material: &str) -> (r: String)
    ensures
        r@ == session_text(key@, material@),
        r@.len() == 64,
        forall|i: int| 0 <= i < r@.len() ==> is_hex_digit(#[trigger] r@[i]),
{
    let mac = hmac_sha256(key, material.as_bytes());
    proof {
        lemma_hex(mac@);
    }
    hex_encode(&mac)
}

// ---------------------------------------------------------------------------
// Comparison
// ---------------------------------------------------------------------------

/// Whether two byte strings are the same. All bytes are looked at, wherever the first difference
/// is.
pub fn constant_eq(left: &[u8], right: &[u8]) -> (r: bool)
    ensures
        r == (left@ == right@),
{
    if left.len() != right.len() {
        return false;
    }
    let mut diff: u8 = 0;
    let mut i: usize = 0;
    while i < left.len()
        invariant
            left@.len() == right@.len(),
            i <= left@.len(),
            diff == 0 <==> forall|j: int| 0 <= j < i ==> left@[j] == right@[j],
        decreases left@.len() - i,
    {
        let a: u8 = left[i];
        let b: u8 = right[i];
        proof {
            assert((diff | (a ^ b)) == 0 <==> (diff == 0 && a == b)) by (bit_vector);
        }
        diff = diff | (a ^ b);
        i += 1;
    }
    proof {
        assert(diff == 0 ==> left@ =~= right@);
    }
    diff == 0
}

// ---------------------------------------------------------------------------
// Tokens
// ---------------------------------------------------------------------------

/// The base64 text of random bytes.
pub fn random_token(bytes: usize) -> (r: String)
    requires
        bytes <= usize::MAX / 4,
    ensures
        exists|raw: Seq<u8>| raw.len() == bytes && r@ == #[trigger] base64url(raw),
{
    let raw = random_fill(bytes);
    base64url_of(&raw)
}

/// A new key for the hashes of conversation ids.
pub fn new_session_key() -> (r: Vec<u8>)
    ensures
        r@.len() == 32,
{
    random_fill(32)
}

/// The PKCE challenge for a verifier: the base64 text of its digest.
pub open spec fn challenge_text(verifier: Seq<char>) -> Seq<char> {
    base64url(sha256(encode_utf8(verifier)))
}

/// The PKCE challenge for a verifier.
pub fn challenge_of(verifier: &str) -> (r: String)
    ensures
        r@ == challenge_text(verifier@),
{
    let digest = sha256_of(verifier.as_bytes());
    base64url_of(&digest)
}

/// The bytes of an unpadded URL-safe base64 text.
pub fn base64url_decode(source: &str) -> (r: Option<Vec<u8>>)
    ensures
        r is Some <==> base64url_bytes(source@) is Some,
        r is Some ==> r->0@ == base64url_bytes(source@)->0,
{
    base64url_read(source)
}

// ---------------------------------------------------------------------------
// Laws
// ---------------------------------------------------------------------------

/// Whether a character is a lower-case hexadecimal digit.
pub open spec fn is_hex_digit(c: char) -> bool {
    '0' <= c <= '9' || 'a' <= c <= 'f'
}

/// A hexadecimal text has two digits for each byte and nothing else.
pub proof fn lemma_hex(bytes: Seq<u8>)
    ensures
        hex(bytes).len() == 2 * bytes.len(),
        forall|i: int| 0 <= i < hex(bytes).len() ==> is_hex_digit(#[trigger] hex(bytes)[i]),
    decreases bytes.len(),
{
    if bytes.len() > 0 {
        lemma_hex(bytes.drop_last());
    }
}

/// A conversation id that holds anything but lower-case hexadecimal digits does not occur in
/// the text by which the backend knows the conversation.
pub proof fn law_session_hides_the_id(key: Seq<u8>, id: Seq<char>, i: int)
    requires
        0 <= i < id.len(),
        !is_hex_digit(id[i]),
    ensures
        !occurs_in(id, session_text(key, id)),
{
    let session = session_text(key, id);
    lemma_hex(hmac(key, encode_utf8(id)));
    if occurs_in(id, session) {
        let at = choose|at: int|
            0 <= at <= session.len() - id.len() && #[trigger] session.subrange(at, at + id.len()) == id;
        assert(session.subrange(at, at + id.len())[i] == session[at + i]);
        assert(is_hex_digit(session[at + i]));
    }
}

} // verus!
